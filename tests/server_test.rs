use dlms_cosem::acse::{AareApdu, AarqApdu, ArlreApdu, ArlrqApdu};
use dlms_cosem::cosem::{CosemAttributeDescriptor, CosemMethodDescriptor};
use dlms_cosem::cosem_object::CosemObject;
use dlms_cosem::hdlc::HdlcFrame;
use dlms_cosem::negotiation::{CONFIGURATOR_CLIENT_SAP, METER_READER_CLIENT_SAP, PUBLIC_CLIENT_SAP};
use dlms_cosem::pdu::{
    ActionRequest, ActionRequestNormal, ActionResponse, ActionResult, DataAccessResult,
    GetDataResult, GetRequest, GetRequestNormal, GetResponse, GetResponseNormal, SetRequest,
    SetRequestNormal, SetResponse,
};
use dlms_cosem::register::Register;
use dlms_cosem::security::lls_authenticate;
use dlms_cosem::server::Server;
use dlms_cosem::transport::Transport;
use dlms_cosem::types::CosemData;
use dlms_cosem::xdlms::{AssociationParameters, Conformance, InitiateRequest, InitiateResponse};

const PUBLIC_ASSOCIATION_LN: [u8; 6] = [0x00, 0x00, 0x28, 0x00, 0x01, 0xFF];
const METER_READER_ASSOCIATION_LN: [u8; 6] = [0x00, 0x00, 0x28, 0x00, 0x02, 0xFF];
const CONFIGURATOR_ASSOCIATION_LN: [u8; 6] = [0x00, 0x00, 0x28, 0x00, 0x03, 0xFF];

struct DummyTransport;

impl Transport for DummyTransport {
    type Error = ();

    fn send(&mut self, _bytes: &[u8]) -> Result<(), Self::Error> {
        Ok(())
    }

    fn receive(&mut self) -> Result<Vec<u8>, Self::Error> {
        Ok(Vec::new())
    }
}

type TestServer = Server<DummyTransport, Register>;

fn new_server(password: Option<Vec<u8>>) -> TestServer {
    Server::new(0x0001, DummyTransport, password, None)
}

fn build_hdlc_request(address: u16, aarq: AarqApdu) -> Vec<u8> {
    let frame = HdlcFrame {
        address,
        control: 0,
        information: aarq.to_bytes().expect("failed to serialize aarq"),
    };

    frame.to_bytes().expect("failed to encode frame")
}

fn parse_aare(bytes: &[u8]) -> AareApdu {
    let frame = HdlcFrame::from_bytes(bytes).expect("failed to decode frame");
    AareApdu::from_bytes(&frame.information)
        .expect("failed to decode aare")
        .1
}

fn parse_rlre(bytes: &[u8]) -> ArlreApdu {
    let frame = HdlcFrame::from_bytes(bytes).expect("failed to decode frame");
    ArlreApdu::from_bytes(&frame.information)
        .expect("failed to decode rlre")
        .1
}

fn default_initiate_request() -> InitiateRequest {
    AssociationParameters::default().to_initiate_request()
}

fn aarq_with(request: &InitiateRequest, mechanism: Option<&[u8]>, auth: Option<Vec<u8>>) -> AarqApdu {
    AarqApdu {
        application_context_name: b"CTX".to_vec(),
        sender_acse_requirements: 0,
        mechanism_name: mechanism.map(|m| m.to_vec()),
        calling_authentication_value: auth,
        user_information: request
            .to_user_information()
            .expect("failed to encode initiate request"),
    }
}

fn activate_association(server: &mut TestServer, address: u16) {
    let response = server
        .handle_frame(&build_hdlc_request(
            address,
            aarq_with(&default_initiate_request(), None, None),
        ))
        .expect("failed to associate");
    assert_eq!(parse_aare(&response).result, 0);
}

fn exchange(server: &mut TestServer, address: u16, information: Vec<u8>) -> Vec<u8> {
    let frame = HdlcFrame {
        address,
        control: 0,
        information,
    };
    let response_bytes = server
        .handle_frame(&frame.to_bytes().expect("failed to encode frame"))
        .expect("server failed to handle request");
    HdlcFrame::from_bytes(&response_bytes)
        .expect("failed to decode response frame")
        .information
}

fn get_normal(server: &mut TestServer, address: u16, class_id: u16, ln: [u8; 6], attribute_id: i8) -> GetDataResult {
    let request = GetRequest::Normal(GetRequestNormal {
        invoke_id_and_priority: 1,
        cosem_attribute_descriptor: CosemAttributeDescriptor {
            class_id,
            instance_id: ln,
            attribute_id,
        },
        access_selection: None,
    });
    let information = exchange(server, address, request.to_bytes().expect("failed to encode get request"));
    match GetResponse::from_bytes(&information).expect("failed to decode get") {
        GetResponse::Normal(GetResponseNormal { result, .. }) => result,
        other => panic!("unexpected response: {other:?}"),
    }
}

fn set_normal(server: &mut TestServer, address: u16, class_id: u16, ln: [u8; 6], attribute_id: i8, value: CosemData) -> DataAccessResult {
    let request = SetRequest::Normal(SetRequestNormal {
        invoke_id_and_priority: 1,
        cosem_attribute_descriptor: CosemAttributeDescriptor {
            class_id,
            instance_id: ln,
            attribute_id,
        },
        access_selection: None,
        value,
    });
    let information = exchange(server, address, request.to_bytes().expect("failed to encode set request"));
    match SetResponse::from_bytes(&information).expect("failed to decode set") {
        SetResponse::Normal(response) => response.result,
        other => panic!("expected normal set response: {other:?}"),
    }
}

fn action_normal(server: &mut TestServer, address: u16, class_id: u16, ln: [u8; 6], method_id: i8) -> (ActionResult, Option<GetDataResult>) {
    let request = ActionRequest::Normal(ActionRequestNormal {
        invoke_id_and_priority: 1,
        cosem_method_descriptor: CosemMethodDescriptor {
            class_id,
            instance_id: ln,
            method_id,
        },
        method_invocation_parameters: None,
    });
    let information = exchange(server, address, request.to_bytes().expect("failed to encode action request"));
    match ActionResponse::from_bytes(&information).expect("failed to decode action response") {
        ActionResponse::Normal(response) => (
            response.single_response.result,
            response.single_response.return_parameters,
        ),
        other => panic!("expected normal action response: {other:?}"),
    }
}

#[test]
fn association_object_list_tracks_registered_objects() {
    let mut server = new_server(None);

    {
        let list = server.object_list();
        let logical_names: Vec<[u8; 6]> = list.iter().map(|entry| entry.logical_name).collect();
        assert_eq!(logical_names.len(), 3);
        assert!(logical_names.contains(&PUBLIC_ASSOCIATION_LN));
        assert!(logical_names.contains(&METER_READER_ASSOCIATION_LN));
        assert!(logical_names.contains(&CONFIGURATOR_ASSOCIATION_LN));
        for entry in list.iter().filter(|entry| entry.class_id == 15) {
            assert!(!entry.attribute_access.is_empty());
        }
    }

    let logical_name = [0, 0, 1, 0, 0, 255];
    server.register_object(logical_name, Register::new());

    let list = server.object_list();
    assert_eq!(list.len(), 4);
    let register_entry = list
        .iter()
        .find(|entry| entry.logical_name == logical_name)
        .expect("register not present in association list");
    assert_eq!(register_entry.class_id, 3);
    assert_eq!(register_entry.version, 0);
    assert_eq!(register_entry.attribute_access.len(), 2);
    assert_eq!(register_entry.method_access.len(), 1);
}

#[test]
fn association_ln_instances_are_client_specific() {
    let mut server = new_server(None);

    let secondary_client = METER_READER_CLIENT_SAP;
    let secondary_logical_name = METER_READER_ASSOCIATION_LN;
    let aarq = aarq_with(&default_initiate_request(), None, None);

    let default_response = server
        .handle_frame(&build_hdlc_request(PUBLIC_CLIENT_SAP, aarq.clone()))
        .expect("default association aarq failed");
    assert_eq!(parse_aare(&default_response).result, 0);

    let secondary_response = server
        .handle_frame(&build_hdlc_request(secondary_client, aarq))
        .expect("secondary association aarq failed");
    assert_eq!(parse_aare(&secondary_response).result, 0);

    let default_data = get_normal(&mut server, PUBLIC_CLIENT_SAP, 15, PUBLIC_ASSOCIATION_LN, 3);
    let secondary_data = get_normal(&mut server, secondary_client, 15, secondary_logical_name, 3);

    match default_data {
        GetDataResult::Data(CosemData::DoubleLongUnsigned(value)) => {
            assert_eq!(value, ((PUBLIC_CLIENT_SAP as u32) << 16) | 0x0001u32);
        }
        other => panic!("unexpected data: {other:?}"),
    }

    match secondary_data {
        GetDataResult::Data(CosemData::DoubleLongUnsigned(value)) => {
            assert_eq!(value, ((secondary_client as u32) << 16) | 0x0001u32);
        }
        other => panic!("unexpected data: {other:?}"),
    }
    assert_eq!(server.association_partners_id(PUBLIC_CLIENT_SAP), Some(0x0010_0001));
    assert_eq!(server.association_partners_id(secondary_client), Some(0x0020_0001));
    assert_eq!(server.association_partners_id(CONFIGURATOR_CLIENT_SAP), None);
}

#[test]
fn lls_challenge_is_issued_and_persisted() {
    let mut server = new_server(Some(b"password".to_vec()));

    let aarq = aarq_with(&default_initiate_request(), Some(b"LLS"), None);
    let aarq_bytes = aarq.to_bytes().expect("failed to encode aarq");
    assert!(AarqApdu::from_bytes(&aarq_bytes).is_ok());

    let request = build_hdlc_request(0x0002, aarq);

    let frame = HdlcFrame::from_bytes(&request).expect("failed to decode request frame");
    assert!(AarqApdu::from_bytes(&frame.information).is_ok());

    let response = server.handle_frame(&request).expect("server failed to handle aarq");
    let aare = parse_aare(&response);
    let challenge = aare
        .responding_authentication_value
        .expect("expected challenge in response");

    let initiate_response = InitiateResponse::from_user_information(&aare.user_information)
        .expect("expected initiate response");
    assert_eq!(initiate_response.negotiated_dlms_version_number, 6);
    assert_eq!(initiate_response.server_max_receive_pdu_size, 0x0400);
    assert_eq!(initiate_response.vaa_name, 0x0007);
    assert_eq!(initiate_response.negotiated_conformance.value, 0x0010_0000);

    assert_eq!(challenge.len(), 16);
    let stored = server.pending_challenge(0x0002).expect("challenge should be stored");
    assert_eq!(stored.as_slice(), challenge.as_slice());
    assert!(!server.has_active_association(0x0002));
}

#[test]
fn lls_challenge_response_validates_and_clears() {
    let mut server = new_server(Some(b"password".to_vec()));

    let association_address = 0x0003;
    let initial_request = build_hdlc_request(
        association_address,
        aarq_with(&default_initiate_request(), Some(b"LLS"), None),
    );

    let initial_response = server
        .handle_frame(&initial_request)
        .expect("server failed to issue challenge");
    let issued_challenge = parse_aare(&initial_response)
        .responding_authentication_value
        .expect("expected challenge");

    let expected_response =
        lls_authenticate(b"password", &issued_challenge).expect("failed to compute mac");

    let follow_up_request = build_hdlc_request(
        association_address,
        aarq_with(&default_initiate_request(), Some(b"LLS"), Some(expected_response.clone())),
    );

    let follow_up_response = server
        .handle_frame(&follow_up_request)
        .expect("server failed to validate response");
    let aare = parse_aare(&follow_up_response);

    assert_eq!(aare.result, 0);
    assert!(aare.responding_authentication_value.is_none());
    let initiate_response = InitiateResponse::from_user_information(&aare.user_information)
        .expect("expected initiate response");
    assert_eq!(initiate_response.negotiated_dlms_version_number, 6);
    assert_eq!(initiate_response.server_max_receive_pdu_size, 0x0400);
    assert_eq!(initiate_response.negotiated_conformance.value, 0x0010_0000);
    assert!(server.pending_challenge(association_address).is_none());
    let limit = server
        .association_client_limit(association_address)
        .expect("expected active association");
    assert_eq!(limit, default_initiate_request().client_max_receive_pdu_size);
}

#[test]
fn successful_initiate_registers_active_association() {
    let mut server = new_server(None);
    let association_address = 0x0005;

    let request = build_hdlc_request(
        association_address,
        aarq_with(&default_initiate_request(), None, None),
    );

    let response = server.handle_frame(&request).expect("server failed to handle aarq");
    let aare = parse_aare(&response);
    assert_eq!(aare.result, 0);
    let limit = server
        .association_client_limit(association_address)
        .expect("expected active association");
    assert_eq!(limit, default_initiate_request().client_max_receive_pdu_size);
}

#[test]
fn initiate_request_with_incompatible_version_is_rejected() {
    let mut server = new_server(None);

    let mut request = default_initiate_request();
    request.proposed_dlms_version_number = 7;

    let response_bytes = server
        .handle_frame(&build_hdlc_request(0x0002, aarq_with(&request, None, None)))
        .expect("server failed to handle aarq");
    let aare = parse_aare(&response_bytes);
    assert_eq!(aare.result, 1);
    assert_eq!(aare.result_source_diagnostic, 2);
}

#[test]
fn failed_initiate_clears_existing_association() {
    let mut server = new_server(None);
    let association_address = 0x0006;

    let response = server
        .handle_frame(&build_hdlc_request(
            association_address,
            aarq_with(&default_initiate_request(), None, None),
        ))
        .expect("server failed to handle aarq");
    assert_eq!(parse_aare(&response).result, 0);
    assert!(server.has_active_association(association_address));

    let mut failing_request = default_initiate_request();
    failing_request.response_allowed = false;
    let response_bytes = server
        .handle_frame(&build_hdlc_request(
            association_address,
            aarq_with(&failing_request, None, None),
        ))
        .expect("server failed to handle aarq");
    let aare = parse_aare(&response_bytes);
    assert_eq!(aare.result, 1);
    assert!(!server.has_active_association(association_address));
}

#[test]
fn initiate_request_without_common_conformance_is_rejected() {
    let mut server = new_server(None);

    let mut request = default_initiate_request();
    request.proposed_conformance = Conformance { value: 0 };

    let response_bytes = server
        .handle_frame(&build_hdlc_request(0x0002, aarq_with(&request, None, None)))
        .expect("server failed to handle aarq");
    let aare = parse_aare(&response_bytes);
    assert_eq!(aare.result, 1);
    assert_eq!(aare.result_source_diagnostic, 4);
}

#[test]
fn initiate_request_without_response_allowed_is_rejected() {
    let mut server = new_server(None);

    let mut request = default_initiate_request();
    request.response_allowed = false;

    let response_bytes = server
        .handle_frame(&build_hdlc_request(0x0002, aarq_with(&request, None, None)))
        .expect("server failed to handle aarq");
    let aare = parse_aare(&response_bytes);
    assert_eq!(aare.result, 1);
    assert_eq!(aare.result_source_diagnostic, 1);
}

#[test]
fn initiate_request_with_zero_client_pdu_is_rejected() {
    let mut server = new_server(None);

    let mut request = default_initiate_request();
    request.client_max_receive_pdu_size = 0;

    let response_bytes = server
        .handle_frame(&build_hdlc_request(0x0002, aarq_with(&request, None, None)))
        .expect("server failed to handle aarq");
    let aare = parse_aare(&response_bytes);
    assert_eq!(aare.result, 1);
    assert_eq!(aare.result_source_diagnostic, 3);
    assert!(!server.has_active_association(0x0002));
}

#[test]
fn get_request_without_active_association_is_denied() {
    let mut server = new_server(None);
    let result = get_normal(&mut server, 0x0002, 1, [0, 0, 0, 0, 0, 1], 2);
    assert_eq!(
        result,
        GetDataResult::DataAccessResult(DataAccessResult::ReadWriteDenied)
    );
}

#[test]
fn set_request_without_active_association_is_denied() {
    let mut server = new_server(None);
    let result = set_normal(&mut server, 0x0002, 1, [0, 0, 0, 0, 0, 1], 2, CosemData::NullData);
    assert_eq!(result, DataAccessResult::ReadWriteDenied);
}

#[test]
fn action_request_without_active_association_is_denied() {
    let mut server = new_server(None);
    let (result, parameters) = action_normal(&mut server, 0x0002, 1, [0, 0, 0, 0, 0, 1], 1);
    assert_eq!(result, ActionResult::ReadWriteDenied);
    assert!(parameters.is_none());
}

#[test]
fn get_request_respects_attribute_access_rights() {
    let mut server = new_server(None);
    let association_address = 0x0100;
    let logical_name = [0, 0, 1, 0, 0, 255];
    server.register_object(logical_name, Register::new());
    activate_association(&mut server, association_address);

    match get_normal(&mut server, association_address, 3, logical_name, 2) {
        GetDataResult::Data(data) => assert_eq!(data, CosemData::Unsigned(0)),
        other => panic!("unexpected result: {other:?}"),
    }
}

#[test]
fn get_request_denied_without_read_access() {
    let mut server = new_server(None);
    let association_address = 0x0101;
    let logical_name = [0, 0, 1, 0, 0, 254];
    server.register_object(logical_name, Register::new());
    activate_association(&mut server, association_address);

    assert_eq!(
        get_normal(&mut server, association_address, 3, logical_name, 1),
        GetDataResult::DataAccessResult(DataAccessResult::ReadWriteDenied)
    );
}

#[test]
fn set_request_respects_attribute_access_rights() {
    let mut server = new_server(None);
    let association_address = 0x0102;
    let logical_name = [0, 0, 1, 0, 0, 253];
    server.register_object(logical_name, Register::new());
    activate_association(&mut server, association_address);

    let result = set_normal(&mut server, association_address, 3, logical_name, 2, CosemData::Unsigned(42));
    assert_eq!(result, DataAccessResult::Success);
    let register = server.object(&logical_name).expect("missing register after set");
    assert_eq!(register.get_attribute(2), Some(CosemData::Unsigned(42)));
}

#[test]
fn set_request_denied_without_write_access() {
    let mut server = new_server(None);
    let association_address = 0x0103;
    let logical_name = [0, 0, 1, 0, 0, 252];
    server.register_object(logical_name, Register::new());
    activate_association(&mut server, association_address);

    let result = set_normal(&mut server, association_address, 3, logical_name, 1, CosemData::Unsigned(7));
    assert_eq!(result, DataAccessResult::ReadWriteDenied);
}

#[test]
fn action_request_respects_method_access_rights() {
    let mut server = new_server(None);
    let association_address = 0x0104;
    let logical_name = [0, 0, 1, 0, 0, 251];
    server.register_object(logical_name, Register::new());
    activate_association(&mut server, association_address);

    let (result, parameters) = action_normal(&mut server, association_address, 3, logical_name, 1);
    assert_eq!(result, ActionResult::Success);
    assert_eq!(parameters, Some(GetDataResult::Data(CosemData::NullData)));
}

#[test]
fn action_request_denied_without_method_access() {
    let mut server = new_server(None);
    let association_address = 0x0105;
    let logical_name = [0, 0, 1, 0, 0, 250];
    server.register_object(logical_name, Register::new());
    activate_association(&mut server, association_address);

    let (result, parameters) = action_normal(&mut server, association_address, 3, logical_name, 2);
    assert_eq!(result, ActionResult::ReadWriteDenied);
    assert!(parameters.is_none());
}

#[test]
fn lls_challenge_response_with_wrong_mac_fails() {
    let mut server = new_server(Some(b"password".to_vec()));

    let association_address = 0x0004;
    let initial_response = server
        .handle_frame(&build_hdlc_request(
            association_address,
            aarq_with(&default_initiate_request(), Some(b"LLS"), None),
        ))
        .expect("server failed to issue challenge");
    let issued_challenge = parse_aare(&initial_response)
        .responding_authentication_value
        .expect("expected challenge");

    let mut wrong_response =
        lls_authenticate(b"password", &issued_challenge).expect("failed to compute mac");
    wrong_response[0] ^= 0xFF;

    let follow_up_response = server
        .handle_frame(&build_hdlc_request(
            association_address,
            aarq_with(&default_initiate_request(), Some(b"LLS"), Some(wrong_response)),
        ))
        .expect("server failed to process response");

    let aare = parse_aare(&follow_up_response);

    assert_eq!(aare.result, 1);
    assert!(aare.responding_authentication_value.is_none());
    let initiate_response = InitiateResponse::from_user_information(&aare.user_information)
        .expect("expected initiate response");
    assert_eq!(initiate_response.vaa_name, 0x0007);
    assert!(!server
        .pending_challenge(association_address)
        .expect("challenge should remain for retry")
        .is_empty());
    assert!(!server.has_active_association(association_address));
}

#[test]
fn release_request_clears_active_association() {
    let mut server = new_server(None);

    let response_bytes = server
        .handle_frame(&build_hdlc_request(
            0x0001,
            aarq_with(&default_initiate_request(), None, None),
        ))
        .expect("failed to handle aarq");
    let aare = parse_aare(&response_bytes);
    assert_eq!(aare.result, 0);
    assert!(server.has_active_association(0x0001));

    let release_req = ArlrqApdu {
        reason: Some(0),
        user_information: None,
    };

    let frame = HdlcFrame {
        address: 0x0001,
        control: 0,
        information: release_req.to_bytes().expect("failed to encode release request"),
    };

    let release_frame = frame.to_bytes().expect("failed to encode frame");
    let response_bytes = server.handle_frame(&release_frame).expect("failed to handle release");
    let rlre = parse_rlre(&response_bytes);
    assert_eq!(rlre.reason, Some(0));
    assert!(!server.has_active_association(0x0001));
}

#[test]
fn release_request_clears_pending_lls_challenge() {
    let mut server = new_server(Some(b"password".to_vec()));

    let response_bytes = server
        .handle_frame(&build_hdlc_request(
            0x0001,
            aarq_with(&default_initiate_request(), Some(b"LLS"), None),
        ))
        .expect("failed to handle aarq");
    let aare = parse_aare(&response_bytes);
    assert!(aare.responding_authentication_value.is_some());
    assert!(server.pending_challenge(0x0001).is_some());

    let release_req = ArlrqApdu {
        reason: None,
        user_information: None,
    };

    let frame = HdlcFrame {
        address: 0x0001,
        control: 0,
        information: release_req.to_bytes().expect("failed to encode release request"),
    };

    let release_frame = frame.to_bytes().expect("failed to encode frame");
    let response_bytes = server.handle_frame(&release_frame).expect("failed to handle release");
    let rlre = parse_rlre(&response_bytes);
    assert_eq!(rlre.reason, Some(0));
    assert!(server.pending_challenge(0x0001).is_none());
}

#[test]
fn scenario_association_without_password() {
    let mut server = new_server(None);
    let response = server
        .handle_frame(&build_hdlc_request(
            0x0010,
            aarq_with(&default_initiate_request(), None, None),
        ))
        .expect("aarq failed");
    let frame = HdlcFrame::from_bytes(&response).unwrap();
    assert_eq!(frame.address, 0x0001);
    let aare = parse_aare(&response);
    assert_eq!(aare.result, 0);
    let initiate = InitiateResponse::from_user_information(&aare.user_information).unwrap();
    assert_eq!(initiate.vaa_name, 0x0007);
    assert_eq!(initiate.server_max_receive_pdu_size, 0x0400);
    assert_eq!(initiate.negotiated_conformance.value, 0x0010_0000);
}

#[test]
fn scenario_get_then_set_register() {
    let mut server = new_server(None);
    let logical_name = [0x00, 0x00, 0x01, 0x00, 0x00, 0xFF];
    let mut register = Register::new();
    register.set_attribute(2, CosemData::Unsigned(10));
    server.register_object(logical_name, register);
    activate_association(&mut server, 0x0010);

    assert_eq!(
        get_normal(&mut server, 0x0010, 3, logical_name, 2),
        GetDataResult::Data(CosemData::Unsigned(10))
    );
    assert_eq!(
        set_normal(&mut server, 0x0010, 3, logical_name, 2, CosemData::Unsigned(20)),
        DataAccessResult::Success
    );
    assert_eq!(
        get_normal(&mut server, 0x0010, 3, logical_name, 2),
        GetDataResult::Data(CosemData::Unsigned(20))
    );
}

#[test]
fn scenario_get_before_association_is_denied() {
    let mut server = new_server(None);
    server.register_object([0, 0, 1, 0, 0, 255], Register::new());
    assert_eq!(
        get_normal(&mut server, 0x0010, 3, [0, 0, 1, 0, 0, 255], 2),
        GetDataResult::DataAccessResult(DataAccessResult::ReadWriteDenied)
    );
}

#[test]
fn unknown_instance_with_association_fails() {
    let mut server = new_server(None);
    activate_association(&mut server, 0x0010);
    let request = GetRequest::Normal(GetRequestNormal {
        invoke_id_and_priority: 1,
        cosem_attribute_descriptor: CosemAttributeDescriptor {
            class_id: 3,
            instance_id: [9, 9, 9, 9, 9, 9],
            attribute_id: 2,
        },
        access_selection: None,
    });
    let frame = HdlcFrame {
        address: 0x0010,
        control: 0,
        information: request.to_bytes().unwrap(),
    };
    assert!(server.handle_frame(&frame.to_bytes().unwrap()).is_err());
}

#[test]
fn malformed_frame_is_refused() {
    let mut server = new_server(None);
    assert!(server.handle_frame(&[0x7E, 0x00, 0x7E]).is_err());
    let frame = HdlcFrame { address: 0x0010, control: 0, information: vec![0xFF, 0x00] };
    assert!(server.handle_frame(&frame.to_bytes().unwrap()).is_err());
}

#[test]
fn oversized_request_is_refused() {
    let mut server = new_server(None);
    let frame = HdlcFrame { address: 0x0010, control: 0, information: vec![0u8; 0x0401] };
    assert!(server.handle_frame(&frame.to_bytes().unwrap()).is_err());
}

#[test]
fn release_echoes_reason_and_user_information() {
    let mut server = new_server(None);
    let release_req = ArlrqApdu { reason: Some(1), user_information: Some(vec![1, 2]) };
    let frame = HdlcFrame {
        address: 0x0010,
        control: 0,
        information: release_req.to_bytes().unwrap(),
    };
    let rlre = parse_rlre(&server.handle_frame(&frame.to_bytes().unwrap()).unwrap());
    assert_eq!(rlre.reason, Some(1));
    assert_eq!(rlre.user_information, Some(vec![1, 2]));
}

#[test]
fn serve_one_reports_transport_frames() {
    let mut server = new_server(None);
    assert!(server.serve_one().is_err());
}
