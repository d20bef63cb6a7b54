use dlms_cosem::cosem::{CosemAttributeDescriptor, CosemMethodDescriptor};
use dlms_cosem::pdu::{
    ActionRequest, ActionRequestNormal, ActionResponse, ActionResponseNormal,
    ActionResponseWithOptionalData, ActionResult, DataAccessResult, DataBlockG, GetDataResult,
    GetRequest, GetRequestNormal, GetRequestWithList, GetResponse, GetResponseNormal,
    GetResponseWithDatablock, GetResponseWithList, SetRequest, SetRequestNormal, SetResponse,
    SetResponseNormal,
};
use dlms_cosem::types::CosemData;
use dlms_cosem::xdlms::{AssociationParameters, Conformance, InitiateRequest, InitiateResponse};

#[test]
fn test_get_request_normal_serialization_deserialization() {
    let req = GetRequest::Normal(GetRequestNormal {
        invoke_id_and_priority: 1,
        cosem_attribute_descriptor: CosemAttributeDescriptor {
            class_id: 8,
            instance_id: [0, 0, 1, 0, 0, 255],
            attribute_id: 2,
        },
        access_selection: None,
    });

    let bytes = req.to_bytes().unwrap();
    let req2 = GetRequest::from_bytes(&bytes).unwrap();

    assert_eq!(req, req2);
}

#[test]
fn test_get_request_with_list_serialization_deserialization() {
    let list = vec![
        CosemAttributeDescriptor {
            class_id: 8,
            instance_id: [0, 0, 1, 0, 0, 255],
            attribute_id: 2,
        },
        CosemAttributeDescriptor {
            class_id: 3,
            instance_id: [0, 0, 2, 0, 0, 255],
            attribute_id: 3,
        },
    ];

    let req = GetRequest::WithList(GetRequestWithList {
        invoke_id_and_priority: 1,
        attribute_descriptor_list: list,
    });

    let bytes = req.to_bytes().unwrap();
    let req2 = GetRequest::from_bytes(&bytes).unwrap();

    assert_eq!(req, req2);
}

#[test]
fn test_get_response_normal_serialization_deserialization() {
    let res = GetResponse::Normal(GetResponseNormal {
        invoke_id_and_priority: 1,
        result: GetDataResult::Data(CosemData::NullData),
    });

    let bytes = res.to_bytes().unwrap();
    let res2 = GetResponse::from_bytes(&bytes).unwrap();

    assert_eq!(res, res2);
}

#[test]
fn test_get_response_with_list_serialization_deserialization() {
    let list = vec![
        GetDataResult::Data(CosemData::NullData),
        GetDataResult::DataAccessResult(DataAccessResult::Success),
    ];

    let res = GetResponse::WithList(GetResponseWithList {
        invoke_id_and_priority: 1,
        result: list,
    });

    let bytes = res.to_bytes().unwrap();
    let res2 = GetResponse::from_bytes(&bytes).unwrap();

    assert_eq!(res, res2);
}

#[test]
fn test_get_response_with_datablock_serialization_deserialization() {
    let mut data = Vec::new();
    data.extend_from_slice(b"hello world");
    let res = GetResponse::WithDataBlock(GetResponseWithDatablock {
        invoke_id_and_priority: 1,
        result: DataBlockG {
            last_block: true,
            block_number: 1,
            raw_data: data,
        },
    });

    let bytes = res.to_bytes().unwrap();
    let res2 = GetResponse::from_bytes(&bytes).unwrap();

    assert_eq!(res, res2);
}

#[test]
fn test_set_request_normal_serialization_deserialization() {
    let req = SetRequest::Normal(SetRequestNormal {
        invoke_id_and_priority: 1,
        cosem_attribute_descriptor: CosemAttributeDescriptor {
            class_id: 8,
            instance_id: [0, 0, 1, 0, 0, 255],
            attribute_id: 2,
        },
        access_selection: None,
        value: CosemData::NullData,
    });

    let bytes = req.to_bytes().unwrap();
    let req2 = SetRequest::from_bytes(&bytes).unwrap();

    assert_eq!(req, req2);
}

#[test]
fn test_set_response_normal_serialization_deserialization() {
    let res = SetResponse::Normal(SetResponseNormal {
        invoke_id_and_priority: 1,
        result: DataAccessResult::Success,
    });

    let bytes = res.to_bytes().unwrap();
    let res2 = SetResponse::from_bytes(&bytes).unwrap();

    assert_eq!(res, res2);
}

#[test]
fn test_action_request_normal_serialization_deserialization() {
    let req = ActionRequest::Normal(ActionRequestNormal {
        invoke_id_and_priority: 1,
        cosem_method_descriptor: CosemMethodDescriptor {
            class_id: 8,
            instance_id: [0, 0, 1, 0, 0, 255],
            method_id: 2,
        },
        method_invocation_parameters: None,
    });

    let bytes = req.to_bytes().unwrap();
    let req2 = ActionRequest::from_bytes(&bytes).unwrap();

    assert_eq!(req, req2);
}

#[test]
fn test_action_response_normal_serialization_deserialization() {
    let res = ActionResponse::Normal(ActionResponseNormal {
        invoke_id_and_priority: 1,
        single_response: ActionResponseWithOptionalData {
            result: ActionResult::Success,
            return_parameters: None,
        },
    });

    let bytes = res.to_bytes().unwrap();
    let res2 = ActionResponse::from_bytes(&bytes).unwrap();

    assert_eq!(res, res2);
}

#[test]
fn test_initiate_request_round_trip() {
    let req = InitiateRequest {
        dedicated_key: Some(vec![0x01, 0x02, 0x03, 0x04]),
        response_allowed: false,
        proposed_quality_of_service: Some(0x05),
        proposed_dlms_version_number: 6,
        proposed_conformance: Conformance { value: 0x0001_0203 },
        client_max_receive_pdu_size: 0x0400,
    };

    let bytes = req.to_bytes().unwrap();
    let decoded = InitiateRequest::from_bytes(&bytes).unwrap();
    assert_eq!(req, decoded);

    let user_information = req.to_user_information().unwrap();
    let decoded_from_ui = InitiateRequest::from_user_information(&user_information).unwrap();
    assert_eq!(req, decoded_from_ui);
}

#[test]
fn test_initiate_response_round_trip() {
    let res = InitiateResponse {
        negotiated_quality_of_service: Some(0x01),
        negotiated_dlms_version_number: 6,
        negotiated_conformance: Conformance { value: 0x0010_0000 },
        server_max_receive_pdu_size: 0x0800,
        vaa_name: 0x0007,
    };

    let bytes = res.to_bytes().unwrap();
    let decoded = InitiateResponse::from_bytes(&bytes).unwrap();
    assert_eq!(res, decoded);

    let user_information = res.to_user_information().unwrap();
    let decoded_from_ui = InitiateResponse::from_user_information(&user_information).unwrap();
    assert_eq!(res, decoded_from_ui);
}

#[test]
fn default_initiate_request_bytes_are_exact() {
    let req = AssociationParameters::default().to_initiate_request();
    let bytes = req.to_bytes().unwrap();
    assert_eq!(
        bytes,
        vec![0x01, 0x00, 0x00, 0x00, 0x06, 0x5F, 0x1F, 0x04, 0x00, 0x10, 0x00, 0x00, 0x04, 0x00]
    );
    let ui = req.to_user_information().unwrap();
    assert_eq!(ui[0], 0x04);
    assert_eq!(ui[1] as usize, bytes.len());
}

#[test]
fn initiate_response_with_trailing_byte_is_refused() {
    let res = InitiateResponse {
        negotiated_quality_of_service: None,
        negotiated_dlms_version_number: 6,
        negotiated_conformance: Conformance { value: 0x0010_0000 },
        server_max_receive_pdu_size: 0x0400,
        vaa_name: 0x0007,
    };
    let mut bytes = res.to_bytes().unwrap();
    bytes.push(0);
    assert!(InitiateResponse::from_bytes(&bytes).is_err());
}

#[test]
fn conformance_operations() {
    let a = Conformance { value: 0x00F0_F0F0 };
    let b = Conformance { value: 0x0010_0010 };
    assert_eq!(a.intersection(&b).value, 0x0010_0010);
    assert!(a.contains(&b));
    assert!(!b.contains(&a));
    assert!(Conformance { value: 0 }.is_empty());
    assert_eq!(a.to_bytes(), [0xF0, 0xF0, 0xF0]);
    assert_eq!(Conformance::from_bytes(&[0x01, 0x02, 0x03]).unwrap().value, 0x0001_0203);
    assert!(Conformance::from_bytes(&[0x01, 0x02]).is_err());
}

#[test]
fn result_codes_are_stable() {
    assert_eq!(DataAccessResult::ReadWriteDenied.code(), 3);
    assert_eq!(DataAccessResult::ObjectUnavailable.code(), 6);
    assert_eq!(DataAccessResult::from_code(14), DataAccessResult::DataBlockNumberInvalid);
    assert_eq!(DataAccessResult::from_code(200), DataAccessResult::OtherReason(200));
    assert_eq!(ActionResult::from_code(11), ActionResult::NoLongActionInProgress);
    assert_eq!(ActionResult::OtherReason(42).code(), 42);
}

#[test]
fn get_request_normal_bytes_are_exact() {
    let req = GetRequest::Normal(GetRequestNormal {
        invoke_id_and_priority: 1,
        cosem_attribute_descriptor: CosemAttributeDescriptor {
            class_id: 3,
            instance_id: [0, 0, 1, 0, 0, 255],
            attribute_id: 2,
        },
        access_selection: None,
    });
    assert_eq!(
        req.to_bytes().unwrap(),
        vec![192, 1, 0, 3, 0, 0, 1, 0, 0, 255, 2, 0]
    );
}

#[test]
fn truncated_requests_are_refused() {
    assert!(GetRequest::from_bytes(&[192, 1, 0]).is_err());
    assert!(SetRequest::from_bytes(&[193, 1]).is_err());
    assert!(ActionRequest::from_bytes(&[195]).is_err());
    assert!(SetResponse::from_bytes(&[197, 1]).is_err());
}

#[test]
fn set_with_list_is_not_written() {
    let req = SetRequest::WithList(dlms_cosem::pdu::SetRequestWithList {
        invoke_id_and_priority: 1,
        attribute_descriptor_list: vec![],
        value_list: vec![],
    });
    assert!(req.to_bytes().is_err());
}

#[test]
fn failure_action_response_round_trips() {
    let res = ActionResponse::Normal(ActionResponseNormal {
        invoke_id_and_priority: 7,
        single_response: ActionResponseWithOptionalData {
            result: ActionResult::ReadWriteDenied,
            return_parameters: Some(GetDataResult::DataAccessResult(DataAccessResult::ObjectUnavailable)),
        },
    });
    let bytes = res.to_bytes().unwrap();
    assert_eq!(bytes, vec![198, 7, 3, 1, 1, 6]);
    assert_eq!(ActionResponse::from_bytes(&bytes).unwrap(), res);
}

#[test]
fn success_action_response_carries_data_choice() {
    let res = ActionResponse::Normal(ActionResponseNormal {
        invoke_id_and_priority: 1,
        single_response: ActionResponseWithOptionalData {
            result: ActionResult::Success,
            return_parameters: Some(GetDataResult::Data(CosemData::Unsigned(5))),
        },
    });
    let bytes = res.to_bytes().unwrap();
    assert_eq!(bytes, vec![198, 1, 0, 1, 0, 17, 5]);
    assert_eq!(ActionResponse::from_bytes(&bytes).unwrap(), res);
}
