use dlms_cosem::hdlc::{HdlcFrame, HdlcFrameError};

#[test]
fn test_hdlc_frame_serialization_deserialization() {
    let info = b"hello world".to_vec();
    let frame = HdlcFrame {
        address: 0x1234,
        control: 0xAB,
        information: info,
    };

    let bytes = frame.to_bytes().unwrap();
    let deserialized_frame = HdlcFrame::from_bytes(&bytes).unwrap();

    assert_eq!(frame, deserialized_frame);
}

#[test]
fn flag_and_escape_bytes_are_stuffed() {
    let frame = HdlcFrame {
        address: 0x7E7D,
        control: 0x00,
        information: vec![0x7E, 0x7D, 0x01],
    };
    let bytes = frame.to_bytes().unwrap();
    assert_eq!(bytes[0], 0x7E);
    assert_eq!(*bytes.last().unwrap(), 0x7E);
    assert!(!bytes[1..bytes.len() - 1].contains(&0x7E));
    assert_eq!(&bytes[1..5], &[0x7D, 0x5E, 0x7D, 0x5D]);
    assert_eq!(HdlcFrame::from_bytes(&bytes).unwrap(), frame);
}

#[test]
fn check_sequence_is_crc16_ibm_3740_little_endian() {
    // "123456789" gives 0x29B1 with this CRC.
    let frame = HdlcFrame {
        address: 0x3132,
        control: 0x33,
        information: b"456789".to_vec(),
    };
    let bytes = frame.to_bytes().unwrap();
    let n = bytes.len();
    assert_eq!(&bytes[n - 3..n - 1], &[0xB1, 0x29]);
}

#[test]
fn single_bit_mutations_are_rejected() {
    let frame = HdlcFrame {
        address: 0x0001,
        control: 0x10,
        information: vec![1, 2, 3, 4, 5],
    };
    let bytes = frame.to_bytes().unwrap();
    for i in 1..bytes.len() - 1 {
        for bit in 0..8 {
            let mut mutated = bytes.clone();
            mutated[i] ^= 1 << bit;
            let result = HdlcFrame::check_frame(&mutated);
            assert!(
                matches!(
                    result,
                    Err(HdlcFrameError::InvalidFcs) | Err(HdlcFrameError::InvalidFrame)
                ),
                "mutation at byte {} bit {} was accepted",
                i,
                bit
            );
        }
    }
}

#[test]
fn malformed_frames_are_invalid_frame() {
    assert_eq!(HdlcFrame::check_frame(&[0x7E, 0x7E]), Err(HdlcFrameError::InvalidFrame));
    assert_eq!(
        HdlcFrame::check_frame(&[0x00, 1, 2, 3, 4, 5, 0x7E]),
        Err(HdlcFrameError::InvalidFrame)
    );
    assert_eq!(
        HdlcFrame::check_frame(&[0x7E, 1, 2, 3, 4, 0x7D, 0x7E]),
        Err(HdlcFrameError::InvalidFrame)
    );
}

#[test]
fn wrong_check_sequence_is_invalid_fcs() {
    let frame = HdlcFrame { address: 2, control: 0, information: vec![9] };
    let mut bytes = frame.to_bytes().unwrap();
    assert_eq!(bytes[4], 9);
    bytes[4] = 8;
    assert_eq!(HdlcFrame::check_frame(&bytes), Err(HdlcFrameError::InvalidFcs));
}
