use dlms_cosem::axdr::{decode_data, encode_data};
use dlms_cosem::error::DlmsError;
use dlms_cosem::types::CosemData;

fn round_trip(d: CosemData) {
    let mut buffer = Vec::new();
    encode_data(&d, &mut buffer).unwrap();
    let (decoded, rest) = decode_data(&buffer).unwrap();
    assert_eq!(decoded, d);
    assert!(rest.is_empty());
}

#[test]
fn tags_and_widths_are_exact() {
    let mut buffer = Vec::new();
    encode_data(&CosemData::LongUnsigned(0x1234), &mut buffer).unwrap();
    encode_data(&CosemData::DoubleLongUnsigned(0x0102_0304), &mut buffer).unwrap();
    encode_data(&CosemData::Integer(-1), &mut buffer).unwrap();
    encode_data(&CosemData::Boolean(true), &mut buffer).unwrap();
    encode_data(&CosemData::Enum(7), &mut buffer).unwrap();
    encode_data(&CosemData::Unsigned(10), &mut buffer).unwrap();
    encode_data(&CosemData::NullData, &mut buffer).unwrap();
    assert_eq!(
        buffer,
        vec![18, 0x12, 0x34, 6, 1, 2, 3, 4, 15, 0xFF, 3, 1, 22, 7, 17, 10, 0]
    );
}

#[test]
fn nested_values_round_trip() {
    round_trip(CosemData::Structure(vec![
        CosemData::Array(vec![CosemData::Unsigned(1), CosemData::Unsigned(2)]),
        CosemData::OctetString(vec![1, 2, 3]),
        CosemData::Boolean(false),
        CosemData::Integer(-5),
        CosemData::NullData,
    ]));
    round_trip(CosemData::Array(Vec::new()));
}

#[test]
fn long_octet_string_uses_object_count_form() {
    let d = CosemData::OctetString(vec![0xAA; 200]);
    let mut buffer = Vec::new();
    encode_data(&d, &mut buffer).unwrap();
    assert_eq!(&buffer[..3], &[9, 0x81, 200]);
    round_trip(d);
}

#[test]
fn unsupported_kinds_are_refused() {
    let mut buffer = Vec::new();
    assert_eq!(
        encode_data(&CosemData::Long64(5), &mut buffer),
        Err(DlmsError::Unsupported)
    );
    assert_eq!(decode_data(&[0x14, 0, 0, 0, 0, 0, 0, 0, 5]).map(|_| ()), Err(DlmsError::Xdlms));
}

#[test]
fn truncated_input_is_refused() {
    assert!(decode_data(&[]).is_err());
    assert!(decode_data(&[18, 0x12]).is_err());
    assert!(decode_data(&[9, 3, 1, 2]).is_err());
    assert!(decode_data(&[1, 2, 17]).is_err());
}

#[test]
fn decode_leaves_the_rest() {
    let (d, rest) = decode_data(&[17, 5, 0xEE]).unwrap();
    assert_eq!(d, CosemData::Unsigned(5));
    assert_eq!(rest, &[0xEE]);
}
