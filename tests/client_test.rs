use dlms_cosem::acse::AareApdu;
use dlms_cosem::acse::AarqApdu;
use dlms_cosem::acse::ArlreApdu;
use dlms_cosem::client::association_request_frame;
use dlms_cosem::client::read_release_reply;
use dlms_cosem::client::{read_association_reply, AssociationStep};
use dlms_cosem::hdlc::HdlcFrame;
use dlms_cosem::xdlms::InitiateResponse;
use dlms_cosem::client::{Client, ClientError};
use dlms_cosem::cosem::{CosemAttributeDescriptor, CosemMethodDescriptor};
use dlms_cosem::cosem_object::CosemObject;
use dlms_cosem::pdu::{
    ActionRequest, ActionRequestNormal, ActionResponse, ActionResult, DataAccessResult,
    GetDataResult, GetRequest, GetRequestNormal, GetResponse, SetRequest, SetRequestNormal,
    SetResponse,
};
use dlms_cosem::register::Register;
use dlms_cosem::server::Server;
use dlms_cosem::transport::Transport;
use dlms_cosem::types::CosemData;
use dlms_cosem::xdlms::{AssociationParameters, Conformance};

struct NoIo;

impl Transport for NoIo {
    type Error = ();

    fn send(&mut self, _bytes: &[u8]) -> Result<(), ()> {
        Ok(())
    }

    fn receive(&mut self) -> Result<Vec<u8>, ()> {
        Err(())
    }
}

/// Hands each frame straight to a server and keeps its answer.
struct Loopback {
    server: Server<NoIo, Register>,
    pending: Option<Vec<u8>>,
}

impl Transport for Loopback {
    type Error = String;

    fn send(&mut self, bytes: &[u8]) -> Result<(), String> {
        let response = self
            .server
            .handle_frame(bytes)
            .map_err(|e| format!("{e:?}"))?;
        self.pending = Some(response);
        Ok(())
    }

    fn receive(&mut self) -> Result<Vec<u8>, String> {
        self.pending.take().ok_or_else(|| "nothing to receive".to_string())
    }
}

const REGISTER_LN: [u8; 6] = [0, 0, 1, 0, 0, 255];

fn loopback(password: Option<Vec<u8>>) -> Loopback {
    let mut server = Server::new(0x0001, NoIo, password, None);
    let mut register = Register::new();
    register.set_attribute(2, CosemData::Unsigned(10));
    server.register_object(REGISTER_LN, register);
    Loopback { server, pending: None }
}

fn get_request() -> GetRequest {
    GetRequest::Normal(GetRequestNormal {
        invoke_id_and_priority: 1,
        cosem_attribute_descriptor: CosemAttributeDescriptor {
            class_id: 3,
            instance_id: REGISTER_LN,
            attribute_id: 2,
        },
        access_selection: None,
    })
}

#[test]
fn client_associates_and_reads() {
    let mut client = Client::new(0x0010, loopback(None), None, None);
    let aare = client.associate().expect("association failed");
    assert_eq!(aare.result, 0);
    let negotiated = client.negotiated_parameters().expect("negotiated parameters");
    assert_eq!(negotiated.negotiated_conformance.value, 0x0010_0000);
    assert_eq!(negotiated.server_max_receive_pdu_size, 0x0400);

    match client.send_get_request(get_request()).unwrap() {
        GetResponse::Normal(r) => assert_eq!(r.result, GetDataResult::Data(CosemData::Unsigned(10))),
        other => panic!("unexpected response: {other:?}"),
    }
}

#[test]
fn client_sets_and_invokes() {
    let mut client = Client::new(0x0010, loopback(None), None, None);
    client.associate().unwrap();
    let set = SetRequest::Normal(SetRequestNormal {
        invoke_id_and_priority: 1,
        cosem_attribute_descriptor: CosemAttributeDescriptor {
            class_id: 3,
            instance_id: REGISTER_LN,
            attribute_id: 2,
        },
        access_selection: None,
        value: CosemData::Unsigned(20),
    });
    match client.send_set_request(set).unwrap() {
        SetResponse::Normal(r) => assert_eq!(r.result, DataAccessResult::Success),
        other => panic!("unexpected response: {other:?}"),
    }
    match client.send_get_request(get_request()).unwrap() {
        GetResponse::Normal(r) => assert_eq!(r.result, GetDataResult::Data(CosemData::Unsigned(20))),
        other => panic!("unexpected response: {other:?}"),
    }
    let action = ActionRequest::Normal(ActionRequestNormal {
        invoke_id_and_priority: 1,
        cosem_method_descriptor: CosemMethodDescriptor {
            class_id: 3,
            instance_id: REGISTER_LN,
            method_id: 1,
        },
        method_invocation_parameters: None,
    });
    match client.send_action_request(action).unwrap() {
        ActionResponse::Normal(r) => assert_eq!(r.single_response.result, ActionResult::Success),
        other => panic!("unexpected response: {other:?}"),
    }
}

#[test]
fn client_release_forgets_association() {
    let mut client = Client::new(0x0010, loopback(None), None, None);
    client.associate().unwrap();
    client.release().expect("release failed");
    assert!(client.negotiated_parameters().is_none());
    assert!(matches!(
        client.send_get_request(get_request()),
        Err(ClientError::AssociationNotEstablished)
    ));
    assert!(matches!(client.release(), Err(ClientError::AssociationNotEstablished)));
}

#[test]
fn client_answers_lls_challenge() {
    let mut client = Client::new(
        0x0010,
        loopback(Some(b"password".to_vec())),
        Some(b"password".to_vec()),
        None,
    );
    let aare = client.associate().expect("LLS association failed");
    assert_eq!(aare.result, 0);
    assert!(client.negotiated_parameters().is_some());
}

#[test]
fn client_with_wrong_password_is_rejected() {
    let mut client = Client::new(
        0x0010,
        loopback(Some(b"password".to_vec())),
        Some(b"wrong".to_vec()),
        None,
    );
    match client.associate() {
        Err(ClientError::AssociationRejected { result, .. }) => assert_eq!(result, 1),
        other => panic!("unexpected outcome: {other:?}"),
    }
    assert!(client.negotiated_parameters().is_none());
}

#[test]
fn client_reports_rejection_diagnostic() {
    let mut client = Client::new(0x0010, loopback(None), None, None);
    let mut params = AssociationParameters::default();
    params.dlms_version = 5;
    client.set_association_parameters(params);
    match client.associate() {
        Err(ClientError::AssociationRejected { result, diagnostic }) => {
            assert_eq!(result, 1);
            assert_eq!(diagnostic, 2);
        }
        other => panic!("unexpected outcome: {other:?}"),
    }
}

#[test]
fn client_checks_negotiated_quality_of_service() {
    let mut client = Client::new(0x0010, loopback(None), None, None);
    let mut params = AssociationParameters::default();
    params.quality_of_service = Some(3);
    params.conformance = Conformance { value: 0x0010_0000 };
    client.set_association_parameters(params);
    // The server echoes the client's quality of service when it sets none.
    assert!(client.associate().is_ok());
    assert_eq!(
        client.negotiated_parameters().unwrap().negotiated_quality_of_service,
        Some(3)
    );
}

#[test]
fn client_without_association_sends_nothing() {
    let mut client = Client::new(0x0010, NoIo, None, None);
    assert!(matches!(
        client.send_get_request(get_request()),
        Err(ClientError::AssociationNotEstablished)
    ));
    assert_eq!(client.association_parameters().dlms_version, 6);
}

#[test]
fn association_request_frame_is_exact() {
    let params = AssociationParameters::default();
    let frame = association_request_frame(0x0010, &params, true, None).unwrap();
    let f = HdlcFrame::from_bytes(&frame).unwrap();
    assert_eq!(f.address, 0x0010);
    assert_eq!(f.control, 0);
    let aarq = AarqApdu::from_bytes(&f.information).unwrap().1;
    assert_eq!(aarq.application_context_name, b"LN_WITH_NO_CIPHERING".to_vec());
    assert_eq!(aarq.mechanism_name, Some(b"LLS".to_vec()));
    assert_eq!(aarq.calling_authentication_value, None);
    assert_eq!(aarq.user_information, params.to_initiate_request().to_user_information().unwrap());
    let plain = association_request_frame(0x0010, &params, false, None).unwrap();
    let f = HdlcFrame::from_bytes(&plain).unwrap();
    assert_eq!(AarqApdu::from_bytes(&f.information).unwrap().1.mechanism_name, None);
}

#[test]
fn association_reply_outcomes() {
    let params = AssociationParameters::default();
    let response = InitiateResponse {
        negotiated_quality_of_service: None,
        negotiated_dlms_version_number: 6,
        negotiated_conformance: Conformance { value: 0x0010_0000 },
        server_max_receive_pdu_size: 0x0400,
        vaa_name: 7,
    };
    let mut aare = AareApdu {
        application_context_name: b"LN_WITH_NO_CIPHERING".to_vec(),
        result: 0,
        result_source_diagnostic: 0,
        responding_authentication_value: None,
        user_information: response.to_user_information().unwrap(),
    };
    match read_association_reply::<()>(&params, false, &aare.to_bytes().unwrap()) {
        Ok((_, AssociationStep::Associated(n))) => assert_eq!(n.server_max_receive_pdu_size, 0x0400),
        _ => panic!("expected association"),
    }
    aare.responding_authentication_value = Some(vec![9; 16]);
    match read_association_reply::<()>(&params, true, &aare.to_bytes().unwrap()) {
        Ok((_, AssociationStep::AnswerChallenge(c))) => assert_eq!(c, vec![9; 16]),
        _ => panic!("expected challenge"),
    }
    aare.result = 1;
    aare.result_source_diagnostic = 4;
    match read_association_reply::<()>(&params, true, &aare.to_bytes().unwrap()) {
        Err(ClientError::AssociationRejected { result: 1, diagnostic: 4 }) => {}
        _ => panic!("expected rejection"),
    }
    assert!(matches!(read_association_reply::<()>(&params, false, &[0x00]), Err(ClientError::AcseError)));
}

#[test]
fn release_reply_outcomes() {
    let ok = ArlreApdu { reason: Some(0), user_information: None }.to_bytes().unwrap();
    assert!(read_release_reply::<()>(&ok).is_ok());
    let rejected = ArlreApdu { reason: Some(2), user_information: None }.to_bytes().unwrap();
    assert!(matches!(read_release_reply::<()>(&rejected), Err(ClientError::ReleaseRejected(2))));
    assert!(matches!(read_release_reply::<()>(&[1, 2]), Err(ClientError::AcseError)));
}
