use dlms_cosem::acse::{AareApdu, AarqApdu, ArlreApdu, ArlrqApdu};

#[test]
fn test_aarq_apdu_serialization_deserialization() {
    let aarq = AarqApdu {
        application_context_name: b"LN_WITH_NO_CIPHERING".to_vec(),
        sender_acse_requirements: 0,
        mechanism_name: None,
        calling_authentication_value: None,
        user_information: b"user_info".to_vec(),
    };

    let bytes = aarq.to_bytes().unwrap();
    let aarq2 = AarqApdu::from_bytes(&bytes).unwrap().1;

    assert_eq!(aarq, aarq2);
}

#[test]
fn test_aarq_apdu_with_optionals_serialization() {
    let aarq = AarqApdu {
        application_context_name: b"LN_WITH_NO_CIPHERING".to_vec(),
        sender_acse_requirements: 0,
        mechanism_name: Some(b"auth".to_vec()),
        calling_authentication_value: Some(b"pass".to_vec()),
        user_information: b"user_info".to_vec(),
    };

    let bytes = aarq.to_bytes().unwrap();
    assert!(!bytes.is_empty());
}

#[test]
fn test_aarq_apdu_with_long_optionals_roundtrip() {
    let mechanism_name: Vec<u8> = (0..300).map(|i| (i % 256) as u8).collect();
    let calling_authentication_value: Vec<u8> = (0..260)
        .map(|i| 255u8.wrapping_sub((i % 256) as u8))
        .collect();

    let aarq = AarqApdu {
        application_context_name: b"LN_WITH_NO_CIPHERING".to_vec(),
        sender_acse_requirements: 0,
        mechanism_name: Some(mechanism_name.clone()),
        calling_authentication_value: Some(calling_authentication_value.clone()),
        user_information: b"user_info".to_vec(),
    };

    let bytes = aarq.to_bytes().unwrap();
    let parsed = AarqApdu::from_bytes(&bytes).unwrap().1;

    assert_eq!(parsed.mechanism_name, Some(mechanism_name));
    assert_eq!(
        parsed.calling_authentication_value,
        Some(calling_authentication_value)
    );
}

#[test]
fn test_aare_apdu_serialization_deserialization() {
    let aare = AareApdu {
        application_context_name: b"LN_WITH_NO_CIPHERING".to_vec(),
        result: 0,
        result_source_diagnostic: 0,
        responding_authentication_value: None,
        user_information: b"user_info".to_vec(),
    };

    let bytes = aare.to_bytes().unwrap();
    let aare2 = AareApdu::from_bytes(&bytes).unwrap().1;
    assert_eq!(aare, aare2);
}

#[test]
fn test_aare_apdu_with_optionals_serialization() {
    let aare = AareApdu {
        application_context_name: b"LN_WITH_NO_CIPHERING".to_vec(),
        result: 0,
        result_source_diagnostic: 0,
        responding_authentication_value: Some(b"pass".to_vec()),
        user_information: b"user_info".to_vec(),
    };

    let bytes = aare.to_bytes().unwrap();
    assert!(!bytes.is_empty());
}

#[test]
fn test_aare_apdu_with_long_optional_roundtrip() {
    let responding_authentication_value: Vec<u8> = (0..260).map(|i| (i % 200) as u8).collect();

    let aare = AareApdu {
        application_context_name: b"LN_WITH_NO_CIPHERING".to_vec(),
        result: 0,
        result_source_diagnostic: 0,
        responding_authentication_value: Some(responding_authentication_value.clone()),
        user_information: b"user_info".to_vec(),
    };

    let bytes = aare.to_bytes().unwrap();
    let parsed = AareApdu::from_bytes(&bytes).unwrap().1;

    assert_eq!(
        parsed.responding_authentication_value,
        Some(responding_authentication_value)
    );
}

#[test]
fn arlrq_round_trip() {
    let apdu = ArlrqApdu {
        reason: Some(0),
        user_information: Some(vec![0x01, 0x02, 0x03]),
    };

    let encoded = apdu.to_bytes().expect("failed to encode A-RLRQ");
    let (_, decoded) = ArlrqApdu::from_bytes(&encoded).expect("failed to decode A-RLRQ");
    assert_eq!(decoded, apdu);
}

#[test]
fn arlre_round_trip() {
    let apdu = ArlreApdu {
        reason: Some(0),
        user_information: None,
    };

    let encoded = apdu.to_bytes().expect("failed to encode A-RLRE");
    let (_, decoded) = ArlreApdu::from_bytes(&encoded).expect("failed to decode A-RLRE");
    assert_eq!(decoded, apdu);
}

#[test]
fn aarq_wire_bytes_are_exact() {
    let aarq = AarqApdu {
        application_context_name: vec![0x41],
        sender_acse_requirements: 0,
        mechanism_name: None,
        calling_authentication_value: None,
        user_information: vec![0x42, 0x43],
    };
    let bytes = aarq.to_bytes().unwrap();
    assert_eq!(
        bytes,
        vec![0x60, 0x0A, 0xA1, 0x01, 0x41, 0x8A, 0x01, 0x00, 0xBE, 0x02, 0x42, 0x43]
    );
}

#[test]
fn long_mechanism_name_uses_two_length_octets() {
    let aarq = AarqApdu {
        application_context_name: vec![],
        sender_acse_requirements: 0,
        mechanism_name: Some(vec![7u8; 300]),
        calling_authentication_value: None,
        user_information: vec![],
    };
    let bytes = aarq.to_bytes().unwrap();
    let pos = bytes.iter().position(|b| *b == 0x8B).unwrap();
    assert_eq!(&bytes[pos..pos + 4], &[0x8B, 0x82, 0x01, 0x2C]);
}

#[test]
fn aare_with_wrong_tag_is_refused() {
    assert!(AareApdu::from_bytes(&[0x60, 0x00]).is_err());
    assert!(AarqApdu::from_bytes(&[]).is_err());
}

#[test]
fn release_with_long_reason_is_refused() {
    assert!(ArlrqApdu::from_bytes(&[0x62, 0x04, 0x80, 0x02, 0x00, 0x00]).is_err());
}
