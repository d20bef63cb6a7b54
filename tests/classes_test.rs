use dlms_cosem::acse::{AareApdu, AarqApdu};
use dlms_cosem::activity_calendar::ActivityCalendar;
use dlms_cosem::clock::Clock;
use dlms_cosem::cosem::{CosemAttributeDescriptor, CosemMethodDescriptor};
use dlms_cosem::cosem_object::CosemObject;
use dlms_cosem::demand_register::DemandRegister;
use dlms_cosem::disconnect_control::DisconnectControl;
use dlms_cosem::extended_register::ExtendedRegister;
use dlms_cosem::hdlc::HdlcFrame;
use dlms_cosem::pdu::{
    ActionRequest, ActionRequestNormal, ActionResponse, ActionResult, DataAccessResult,
    GetDataResult, GetRequest, GetRequestNormal, GetResponse, SetRequest, SetRequestNormal,
    SetResponse,
};
use dlms_cosem::profile_generic::ProfileGeneric;
use dlms_cosem::sap_assignment::SapAssignment;
use dlms_cosem::security_setup::SecuritySetup;
use dlms_cosem::server::Server;
use dlms_cosem::transport::Transport;
use dlms_cosem::types::CosemData;
use dlms_cosem::xdlms::AssociationParameters;

struct DummyTransport;

impl Transport for DummyTransport {
    type Error = ();

    fn send(&mut self, _bytes: &[u8]) -> Result<(), ()> {
        Ok(())
    }

    fn receive(&mut self) -> Result<Vec<u8>, ()> {
        Ok(Vec::new())
    }
}

fn associate<O: CosemObject>(server: &mut Server<DummyTransport, O>, address: u16) {
    let aarq = AarqApdu {
        application_context_name: b"CTX".to_vec(),
        sender_acse_requirements: 0,
        mechanism_name: None,
        calling_authentication_value: None,
        user_information: AssociationParameters::default()
            .to_initiate_request()
            .to_user_information()
            .unwrap(),
    };
    let frame = HdlcFrame { address, control: 0, information: aarq.to_bytes().unwrap() };
    let response = server.handle_frame(&frame.to_bytes().unwrap()).unwrap();
    let info = HdlcFrame::from_bytes(&response).unwrap().information;
    assert_eq!(AareApdu::from_bytes(&info).unwrap().1.result, 0);
}

fn exchange<O: CosemObject>(server: &mut Server<DummyTransport, O>, address: u16, information: Vec<u8>) -> Vec<u8> {
    let frame = HdlcFrame { address, control: 0, information };
    let response = server.handle_frame(&frame.to_bytes().unwrap()).unwrap();
    HdlcFrame::from_bytes(&response).unwrap().information
}

fn get<O: CosemObject>(server: &mut Server<DummyTransport, O>, address: u16, class_id: u16, ln: [u8; 6], attribute_id: i8) -> GetDataResult {
    let request = GetRequest::Normal(GetRequestNormal {
        invoke_id_and_priority: 1,
        cosem_attribute_descriptor: CosemAttributeDescriptor { class_id, instance_id: ln, attribute_id },
        access_selection: None,
    });
    match GetResponse::from_bytes(&exchange(server, address, request.to_bytes().unwrap())).unwrap() {
        GetResponse::Normal(r) => r.result,
        other => panic!("unexpected get response: {other:?}"),
    }
}

fn set<O: CosemObject>(server: &mut Server<DummyTransport, O>, address: u16, class_id: u16, ln: [u8; 6], attribute_id: i8, value: CosemData) -> DataAccessResult {
    let request = SetRequest::Normal(SetRequestNormal {
        invoke_id_and_priority: 2,
        cosem_attribute_descriptor: CosemAttributeDescriptor { class_id, instance_id: ln, attribute_id },
        access_selection: None,
        value,
    });
    match SetResponse::from_bytes(&exchange(server, address, request.to_bytes().unwrap())).unwrap() {
        SetResponse::Normal(r) => r.result,
        other => panic!("unexpected set response: {other:?}"),
    }
}

fn act<O: CosemObject>(server: &mut Server<DummyTransport, O>, address: u16, class_id: u16, ln: [u8; 6], method_id: i8) -> (ActionResult, Option<GetDataResult>) {
    let request = ActionRequest::Normal(ActionRequestNormal {
        invoke_id_and_priority: 2,
        cosem_method_descriptor: CosemMethodDescriptor { class_id, instance_id: ln, method_id },
        method_invocation_parameters: None,
    });
    match ActionResponse::from_bytes(&exchange(server, address, request.to_bytes().unwrap())).unwrap() {
        ActionResponse::Normal(r) => (r.single_response.result, r.single_response.return_parameters),
        other => panic!("unexpected action response: {other:?}"),
    }
}

#[test]
fn test_activity_calendar_new() {
    let calendar = ActivityCalendar::new();
    assert_eq!(calendar.get_attribute(2), Some(CosemData::NullData));
    assert_eq!(calendar.get_attribute(3), Some(CosemData::NullData));
    assert_eq!(calendar.get_attribute(4), Some(CosemData::NullData));
    assert_eq!(calendar.get_attribute(5), Some(CosemData::NullData));
}

#[test]
fn test_clock_new() {
    let clock = Clock::new();
    for id in 2..=8 {
        assert_eq!(clock.get_attribute(id), Some(CosemData::NullData));
    }
    assert_eq!(clock.get_attribute(9), None);
}

#[test]
fn test_clock_set_get() {
    let mut clock = Clock::new();
    let time = vec![0, 0, 0, 0, 0, 0, 0, 0, 0, 0, 0, 0];
    clock.set_attribute(2, CosemData::DateTime(time.clone())).unwrap();
    assert_eq!(clock.get_attribute(2), Some(CosemData::DateTime(time)));
}

#[test]
fn test_demand_register_new() {
    let register = DemandRegister::new();
    for id in 2..=9 {
        assert_eq!(register.get_attribute(id), Some(CosemData::NullData));
    }
}

#[test]
fn test_disconnect_control_new() {
    let control = DisconnectControl::new();
    assert_eq!(control.get_attribute(2), Some(CosemData::NullData));
    assert_eq!(control.get_attribute(3), Some(CosemData::NullData));
}

#[test]
fn test_disconnect_control_methods() {
    let mut control = DisconnectControl::new();
    control.remote_disconnect();
    assert_eq!(control.get_attribute(2), Some(CosemData::Boolean(false)));
    control.remote_reconnect();
    assert_eq!(control.get_attribute(2), Some(CosemData::Boolean(true)));
}

#[test]
fn test_extended_register_new() {
    let register = ExtendedRegister::new();
    assert_eq!(register.get_attribute(2), Some(CosemData::Unsigned(0)));
    assert_eq!(
        register.get_attribute(3),
        Some(CosemData::Structure(vec![CosemData::Integer(0), CosemData::Enum(255)]))
    );
    assert_eq!(register.get_attribute(4), Some(CosemData::NullData));
    assert_eq!(register.get_attribute(5), Some(CosemData::NullData));
}

#[test]
fn test_extended_register_set_get() {
    let mut register = ExtendedRegister::new();
    register.set_attribute(2, CosemData::Unsigned(10)).unwrap();
    assert_eq!(register.get_attribute(2), Some(CosemData::Unsigned(10)));
}

#[test]
fn test_extended_register_reset() {
    let mut register = ExtendedRegister::new();
    register.set_attribute(2, CosemData::Unsigned(10)).unwrap();
    assert_eq!(register.get_attribute(2), Some(CosemData::Unsigned(10)));
    register.reset();
    assert_eq!(register.get_attribute(2), Some(CosemData::Unsigned(0)));
}

#[test]
fn test_profile_generic_new() {
    let profile = ProfileGeneric::new();
    for id in 2..=8 {
        assert_eq!(profile.get_attribute(id), Some(CosemData::NullData));
    }
}

#[test]
fn test_security_setup_new() {
    let setup = SecuritySetup::new();
    assert_eq!(setup.get_attribute(2), Some(CosemData::Unsigned(0)));
    assert_eq!(setup.get_attribute(3), Some(CosemData::Unsigned(0)));
    assert_eq!(setup.get_attribute(4), Some(CosemData::OctetString(Vec::new())));
    assert_eq!(setup.get_attribute(5), Some(CosemData::OctetString(Vec::new())));
}

#[test]
fn test_security_setup_set_get() {
    let mut setup = SecuritySetup::new();
    setup.set_attribute(2, CosemData::Unsigned(1)).unwrap();
    assert_eq!(setup.get_attribute(2), Some(CosemData::Unsigned(1)));
    setup.set_attribute(3, CosemData::Unsigned(2)).unwrap();
    assert_eq!(setup.get_attribute(3), Some(CosemData::Unsigned(2)));
    let client_title = b"client".to_vec();
    setup.set_attribute(4, CosemData::OctetString(client_title.clone())).unwrap();
    assert_eq!(setup.get_attribute(4), Some(CosemData::OctetString(client_title)));
    let server_title = b"server".to_vec();
    setup.set_attribute(5, CosemData::OctetString(server_title.clone())).unwrap();
    assert_eq!(setup.get_attribute(5), Some(CosemData::OctetString(server_title)));
    assert_eq!(setup.set_attribute(2, CosemData::Boolean(true)), None);
}

#[test]
fn sap_assignment_exposes_names() {
    let sap = SapAssignment::with_logical_device_names(b"LN".to_vec());
    assert_eq!(sap.get_attribute(2), Some(CosemData::OctetString(b"LN".to_vec())));
    let mut sap = SapAssignment::new();
    assert_eq!(sap.set_attribute(2, CosemData::OctetString(b"UPDATED".to_vec())), None);
}

#[test]
fn extended_register_attribute_access_rights_enforced() {
    let mut server: Server<DummyTransport, ExtendedRegister> = Server::new(0x0001, DummyTransport, None, None);
    let association_address = 0x0106;
    let logical_name = [0, 0, 1, 0, 0, 249];
    let mut register = ExtendedRegister::new();
    register.set_attribute(2, CosemData::Unsigned(77)).expect("failed to seed register value");
    server.register_object(logical_name, register);
    associate(&mut server, association_address);

    match get(&mut server, association_address, 4, logical_name, 2) {
        GetDataResult::Data(CosemData::Unsigned(value)) => assert_eq!(value, 77),
        other => panic!("unexpected get response: {other:?}"),
    }
    assert_eq!(
        set(&mut server, association_address, 4, logical_name, 2, CosemData::NullData),
        DataAccessResult::ReadWriteDenied
    );
}

#[test]
fn extended_register_method_access_rights_enforced() {
    let mut server: Server<DummyTransport, ExtendedRegister> = Server::new(0x0001, DummyTransport, None, None);
    let association_address = 0x0107;
    let logical_name = [0, 0, 1, 0, 0, 248];
    let mut register = ExtendedRegister::new();
    register.set_attribute(2, CosemData::Unsigned(15)).expect("failed to seed register value");
    server.register_object(logical_name, register);
    associate(&mut server, association_address);

    let (result, parameters) = act(&mut server, association_address, 4, logical_name, 1);
    assert_eq!(result, ActionResult::Success);
    assert_eq!(parameters, Some(GetDataResult::Data(CosemData::NullData)));
    let register = server.object(&logical_name).expect("missing extended register");
    assert_eq!(register.get_attribute(2), Some(CosemData::Unsigned(0)));

    let (result, _) = act(&mut server, association_address, 4, logical_name, 2);
    assert_eq!(result, ActionResult::ReadWriteDenied);
}

#[test]
fn clock_attribute_access_rights_enforced() {
    let mut server: Server<DummyTransport, Clock> = Server::new(0x0001, DummyTransport, None, None);
    let association_address = 0x010B;
    let logical_name = [0, 0, 1, 0, 0, 245];
    server.register_object(logical_name, Clock::new());
    associate(&mut server, association_address);

    assert_eq!(
        set(&mut server, association_address, 8, logical_name, 2, CosemData::OctetString(vec![0; 12])),
        DataAccessResult::Success
    );
    assert_eq!(
        set(&mut server, association_address, 8, logical_name, 4, CosemData::Enum(0)),
        DataAccessResult::ReadWriteDenied
    );
}

#[test]
fn activity_calendar_attribute_access_rights_enforced() {
    let mut server: Server<DummyTransport, ActivityCalendar> = Server::new(0x0001, DummyTransport, None, None);
    let association_address = 0x010C;
    let logical_name = [0, 0, 1, 0, 0, 244];
    let mut calendar = ActivityCalendar::new();
    calendar
        .set_attribute(2, CosemData::OctetString(b"ACTIVE".to_vec()))
        .expect("failed to seed calendar name");
    server.register_object(logical_name, calendar);
    associate(&mut server, association_address);

    match get(&mut server, association_address, 20, logical_name, 2) {
        GetDataResult::Data(CosemData::OctetString(value)) => assert_eq!(value, b"ACTIVE".to_vec()),
        other => panic!("unexpected get result: {:?}", other),
    }
    assert_eq!(
        set(&mut server, association_address, 20, logical_name, 2, CosemData::OctetString(b"UPDATED".to_vec())),
        DataAccessResult::ReadWriteDenied
    );
}

#[test]
fn objects_without_rights_are_denied() {
    let mut server: Server<DummyTransport, SecuritySetup> = Server::new(0x0001, DummyTransport, None, None);
    let logical_name = [0, 0, 43, 0, 0, 255];
    server.register_object(logical_name, SecuritySetup::new());
    associate(&mut server, 0x0110);
    assert_eq!(
        get(&mut server, 0x0110, 64, logical_name, 2),
        GetDataResult::DataAccessResult(DataAccessResult::ReadWriteDenied)
    );
    assert_eq!(
        set(&mut server, 0x0110, 64, logical_name, 2, CosemData::Unsigned(3)),
        DataAccessResult::ReadWriteDenied
    );
}
