use dlms_cosem::association_ln::{AssociationLN, ObjectListEntry};
use dlms_cosem::cosem_object::{
    AttributeAccessDescriptor, AttributeAccessMode, CosemObject, MethodAccessDescriptor,
    MethodAccessMode,
};
use dlms_cosem::data::Data;
use dlms_cosem::register::Register;
use dlms_cosem::types::CosemData;

#[test]
fn test_data_enum() {
    let data = CosemData::Array(Vec::new());
    let cloned_data = data.clone();
    assert_eq!(data, cloned_data);
}

#[test]
fn test_data_new() {
    let data = Data::new(CosemData::Unsigned(10));
    assert_eq!(data.class_id(), 1);
    assert_eq!(data.get_attribute(2), Some(CosemData::Unsigned(10)));
}

#[test]
fn test_data_set_get() {
    let mut data = Data::new(CosemData::NullData);
    data.set_attribute(2, CosemData::Unsigned(20)).unwrap();
    assert_eq!(data.get_attribute(2), Some(CosemData::Unsigned(20)));
}

#[test]
fn test_register_new() {
    let register = Register::new();
    assert_eq!(register.get_attribute(2), Some(CosemData::Unsigned(0)));
    assert_eq!(
        register.get_attribute(3),
        Some(CosemData::Structure(vec![
            CosemData::Integer(0),
            CosemData::Enum(255)
        ]))
    );
}

#[test]
fn test_register_set_get() {
    let mut register = Register::new();
    register.set_attribute(2, CosemData::Unsigned(10)).unwrap();
    assert_eq!(register.get_attribute(2), Some(CosemData::Unsigned(10)));
}

#[test]
fn test_register_reset() {
    let mut register = Register::new();
    register.set_attribute(2, CosemData::Unsigned(10)).unwrap();
    assert_eq!(register.get_attribute(2), Some(CosemData::Unsigned(10)));
    register.reset();
    assert_eq!(register.get_attribute(2), Some(CosemData::Unsigned(0)));
}

fn register_entry() -> ObjectListEntry {
    ObjectListEntry {
        class_id: 3,
        version: 0,
        logical_name: [0, 0, 1, 0, 0, 255],
        attribute_access: vec![
            AttributeAccessDescriptor::new(2, AttributeAccessMode::ReadWrite),
            AttributeAccessDescriptor::new(3, AttributeAccessMode::ReadWrite),
        ],
        method_access: vec![MethodAccessDescriptor::new(1, MethodAccessMode::Access)],
    }
}

#[test]
fn test_association_ln_new() {
    let object_list = vec![register_entry()];
    let app_context_name = b"app_context".to_vec();
    let xdlms_context_info = b"xdlms_info".to_vec();
    let auth_mech_name = b"auth_mech".to_vec();

    let association_ln = AssociationLN::new(
        object_list,
        12345,
        app_context_name.clone(),
        xdlms_context_info.clone(),
        auth_mech_name.clone(),
    );

    assert_eq!(association_ln.class_id(), 15);
    assert_eq!(
        association_ln.get_attribute(2),
        Some(CosemData::Array(vec![CosemData::Structure(vec![
            CosemData::LongUnsigned(3),
            CosemData::Unsigned(0),
            CosemData::OctetString(vec![0, 0, 1, 0, 0, 255]),
            CosemData::Structure(vec![
                CosemData::Array(vec![
                    CosemData::Structure(vec![
                        CosemData::Integer(2),
                        CosemData::Enum(AttributeAccessMode::ReadWrite as u8),
                        CosemData::NullData,
                    ]),
                    CosemData::Structure(vec![
                        CosemData::Integer(3),
                        CosemData::Enum(AttributeAccessMode::ReadWrite as u8),
                        CosemData::NullData,
                    ]),
                ]),
                CosemData::Array(Vec::new()),
                CosemData::Array(vec![CosemData::Structure(vec![
                    CosemData::Integer(1),
                    CosemData::Enum(MethodAccessMode::Access as u8),
                ]),]),
            ]),
        ])]))
    );
    assert_eq!(
        association_ln.get_attribute(3),
        Some(CosemData::DoubleLongUnsigned(12345))
    );
    assert_eq!(
        association_ln.get_attribute(4),
        Some(CosemData::OctetString(app_context_name))
    );
    assert_eq!(
        association_ln.get_attribute(5),
        Some(CosemData::OctetString(xdlms_context_info))
    );
    assert_eq!(
        association_ln.get_attribute(6),
        Some(CosemData::OctetString(auth_mech_name))
    );
}

#[test]
fn test_association_ln_set_attribute() {
    let mut association_ln = AssociationLN::default();

    association_ln
        .set_attribute(3, CosemData::DoubleLongUnsigned(54321))
        .unwrap();
    assert_eq!(
        association_ln.get_attribute(3),
        Some(CosemData::DoubleLongUnsigned(54321))
    );

    let new_app_context = b"new_app_context".to_vec();
    association_ln
        .set_attribute(4, CosemData::OctetString(new_app_context.clone()))
        .unwrap();
    assert_eq!(
        association_ln.get_attribute(4),
        Some(CosemData::OctetString(new_app_context))
    );

    assert_eq!(association_ln.set_attribute(2, CosemData::NullData), None);
}

#[test]
fn object_list_entry_is_rendered_as_structure() {
    let entry = ObjectListEntry {
        class_id: 3,
        version: 1,
        logical_name: [0, 0, 1, 0, 0, 255],
        attribute_access: vec![
            AttributeAccessDescriptor::new(2, AttributeAccessMode::ReadWrite),
            AttributeAccessDescriptor::new(3, AttributeAccessMode::Read),
        ],
        method_access: vec![MethodAccessDescriptor::new(1, MethodAccessMode::Access)],
    };

    let data = entry.to_cosem_data();
    assert_eq!(
        data,
        CosemData::Structure(vec![
            CosemData::LongUnsigned(3),
            CosemData::Unsigned(1),
            CosemData::OctetString(vec![0, 0, 1, 0, 0, 255]),
            CosemData::Structure(vec![
                CosemData::Array(vec![
                    CosemData::Structure(vec![
                        CosemData::Integer(2),
                        CosemData::Enum(AttributeAccessMode::ReadWrite as u8),
                        CosemData::NullData,
                    ]),
                    CosemData::Structure(vec![
                        CosemData::Integer(3),
                        CosemData::Enum(AttributeAccessMode::Read as u8),
                        CosemData::NullData,
                    ]),
                ]),
                CosemData::Array(Vec::new()),
                CosemData::Array(vec![CosemData::Structure(vec![
                    CosemData::Integer(1),
                    CosemData::Enum(MethodAccessMode::Access as u8),
                ]),]),
            ]),
        ])
    );
}

#[test]
fn association_ln_exposes_dynamic_object_list() {
    let first = ObjectListEntry {
        class_id: 15,
        version: 0,
        logical_name: [0, 0, 40, 0, 0, 255],
        attribute_access: Vec::new(),
        method_access: Vec::new(),
    };
    let mut association = AssociationLN::new(vec![first.clone()], 0, Vec::new(), Vec::new(), Vec::new());

    let attribute = association
        .get_attribute(2)
        .expect("expected object list attribute");
    assert_eq!(attribute, CosemData::Array(vec![first.to_cosem_data()]));

    let second = ObjectListEntry {
        class_id: 3,
        version: 0,
        logical_name: [1, 0, 0, 0, 0, 255],
        attribute_access: Vec::new(),
        method_access: Vec::new(),
    };
    association.set_object_list(vec![first.clone(), second.clone()]);

    let updated = association
        .get_attribute(2)
        .expect("expected refreshed object list");
    assert_eq!(
        updated,
        CosemData::Array(vec![first.to_cosem_data(), second.to_cosem_data()])
    );
}

#[test]
fn association_ln_method_replies_to_octet_string_only() {
    let mut association = AssociationLN::default();
    assert_eq!(
        association.invoke_method(1, CosemData::OctetString(b"client_challenge".to_vec())),
        Some(CosemData::OctetString(b"server_response".to_vec()))
    );
    assert_eq!(association.invoke_method(1, CosemData::NullData), None);
    assert_eq!(association.invoke_method(2, CosemData::NullData), None);
}
