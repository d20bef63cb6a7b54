use dlms_cosem::acse::{AareApdu, AarqApdu};
use dlms_cosem::hdlc::HdlcFrame;
use dlms_cosem::register::Register;
use dlms_cosem::security::lls_authenticate;
use dlms_cosem::server::Server;
use dlms_cosem::transport::Transport;
use dlms_cosem::xdlms::AssociationParameters;

struct NullTransport;

impl Transport for NullTransport {
    type Error = ();

    fn send(&mut self, _bytes: &[u8]) -> Result<(), ()> {
        Ok(())
    }

    fn receive(&mut self) -> Result<Vec<u8>, ()> {
        Err(())
    }
}

fn aarq_frame(auth: Option<Vec<u8>>) -> Vec<u8> {
    let aarq = AarqApdu {
        application_context_name: b"LN_WITH_NO_CIPHERING".to_vec(),
        sender_acse_requirements: 0,
        mechanism_name: Some(b"LLS".to_vec()),
        calling_authentication_value: auth,
        user_information: AssociationParameters::default()
            .to_initiate_request()
            .to_user_information()
            .unwrap(),
    };
    HdlcFrame {
        address: 0x0010,
        control: 0,
        information: aarq.to_bytes().unwrap(),
    }
    .to_bytes()
    .unwrap()
}

fn aare_of(bytes: &[u8]) -> AareApdu {
    let frame = HdlcFrame::from_bytes(bytes).unwrap();
    AareApdu::from_bytes(&frame.information).unwrap().1
}

#[test]
fn scenario_lls_challenge_and_response() {
    let mut server: Server<NullTransport, Register> =
        Server::new(0x0001, NullTransport, Some(b"password".to_vec()), None);
    let first = aare_of(&server.handle_frame(&aarq_frame(None)).unwrap());
    let challenge = first.responding_authentication_value.expect("challenge");
    assert_eq!(challenge.len(), 16);
    assert!(!server.has_active_association(0x0010));

    let mac = lls_authenticate(b"password", &challenge).unwrap();
    assert_eq!(mac.len(), 32);
    let second = aare_of(&server.handle_frame(&aarq_frame(Some(mac))).unwrap());
    assert_eq!(second.result, 0);
    assert!(server.has_active_association(0x0010));
    assert!(server.pending_challenge(0x0010).is_none());
}

#[test]
fn scenario_lls_tampered_response_keeps_challenge() {
    let mut server: Server<NullTransport, Register> =
        Server::new(0x0001, NullTransport, Some(b"password".to_vec()), None);
    let first = aare_of(&server.handle_frame(&aarq_frame(None)).unwrap());
    let challenge = first.responding_authentication_value.expect("challenge");
    let mut mac = lls_authenticate(b"password", &challenge).unwrap();
    mac[0] ^= 0x01;
    let second = aare_of(&server.handle_frame(&aarq_frame(Some(mac))).unwrap());
    assert_eq!(second.result, 1);
    assert_eq!(server.pending_challenge(0x0010), Some(challenge.clone()));

    let retry = lls_authenticate(b"password", &challenge).unwrap();
    let third = aare_of(&server.handle_frame(&aarq_frame(Some(retry))).unwrap());
    assert_eq!(third.result, 0);
}

#[test]
fn lls_without_challenge_is_refused() {
    let mut server: Server<NullTransport, Register> =
        Server::new(0x0001, NullTransport, Some(b"password".to_vec()), None);
    let aare = aare_of(&server.handle_frame(&aarq_frame(Some(vec![0u8; 32]))).unwrap());
    assert_eq!(aare.result, 1);
    assert!(!server.has_active_association(0x0010));
}

#[test]
fn hmac_sha256_known_answer() {
    // RFC 4231, test case 2.
    let mac = lls_authenticate(b"Jefe", b"what do ya want for nothing?").unwrap();
    assert_eq!(
        mac,
        vec![
            0x5b, 0xdc, 0xc1, 0x46, 0xbf, 0x60, 0x75, 0x4e, 0x6a, 0x04, 0x24, 0x26, 0x08, 0x95,
            0x75, 0xc7, 0x5a, 0x00, 0x3f, 0x08, 0x9d, 0x27, 0x39, 0x83, 0x9d, 0xec, 0x58, 0xb9,
            0x64, 0xec, 0x38, 0x43
        ]
    );
}

#[test]
fn hls_round_trip_and_short_input() {
    let key = [7u8; 16];
    let sealed = dlms_cosem::security::hls_encrypt(b"meter", &key).unwrap();
    assert_eq!(sealed.len(), 12 + 5 + 16);
    assert_ne!(&sealed[12..17], b"meter");
    let mut tampered = sealed.clone();
    tampered[12] ^= 0x01;
    assert!(dlms_cosem::security::hls_decrypt(&tampered, &key).is_err());
    assert_eq!(dlms_cosem::security::hls_decrypt(&sealed, &key).unwrap(), b"meter".to_vec());
    assert!(dlms_cosem::security::hls_decrypt(&[1, 2, 3], &key).is_err());
    assert!(dlms_cosem::security::hls_encrypt(b"x", &[1u8; 5]).is_err());
}

#[test]
fn challenges_are_fresh() {
    let mut first: Server<NullTransport, Register> =
        Server::new(0x0001, NullTransport, Some(b"password".to_vec()), None);
    let a = aare_of(&first.handle_frame(&aarq_frame(None)).unwrap())
        .responding_authentication_value
        .unwrap();
    let b = aare_of(&first.handle_frame(&aarq_frame(None)).unwrap())
        .responding_authentication_value
        .unwrap();
    assert_ne!(a, b);
    assert_eq!(first.pending_challenge(0x0010), Some(b));
}
