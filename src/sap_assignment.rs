use vstd::prelude::*;

use crate::cosem::{CosemObjectAttributeId, CosemObjectMethodId};
use crate::cosem_object::{AttributeAccessDescriptor, CosemObject, MethodAccessDescriptor};
use crate::types::{copy_bytes, CosemData};

verus! {

/// SAP Assignment (class 21): the logical device name list as an octet
/// string (attribute 2), read-only; it grants no access rights.
#[derive(Debug)]
pub struct SapAssignment {
    pub logical_device_name_list: Vec<u8>,
}

impl SapAssignment {
    pub fn new() -> (r: Self)
        ensures
            r.logical_device_name_list@.len() == 0,
    {
        Self { logical_device_name_list: Vec::new() }
    }

    pub fn with_logical_device_names(names: Vec<u8>) -> (r: Self)
        ensures
            r.logical_device_name_list@ == names@,
    {
        Self { logical_device_name_list: names }
    }
}

impl Default for SapAssignment {
    fn default() -> Self {
        Self::new()
    }
}

impl CosemObject for SapAssignment {
    fn class_id(&self) -> u16 {
        21
    }

    fn version(&self) -> u8 {
        0
    }

    fn attribute_access_rights(&self) -> Vec<AttributeAccessDescriptor> {
        Vec::new()
    }

    fn method_access_rights(&self) -> Vec<MethodAccessDescriptor> {
        Vec::new()
    }

    fn get_attribute(&self, attribute_id: CosemObjectAttributeId) -> Option<CosemData> {
        if attribute_id == 2 {
            Some(CosemData::OctetString(copy_bytes(self.logical_device_name_list.as_slice())))
        } else {
            None
        }
    }

    fn set_attribute(&mut self, attribute_id: CosemObjectAttributeId, data: CosemData) -> Option<()> {
        None
    }

    fn invoke_method(&mut self, method_id: CosemObjectMethodId, data: CosemData) -> Option<
        CosemData,
    > {
        None
    }
}

} // verus!
