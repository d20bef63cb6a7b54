use vstd::prelude::*;

use crate::cosem::{CosemObjectAttributeId, CosemObjectMethodId};
use crate::cosem_object::{AttributeAccessDescriptor, CosemObject, MethodAccessDescriptor};
use crate::types::{copy_data, CosemData};

verus! {

/// Data (class 1): one value, attribute 2.
#[derive(Debug)]
pub struct Data {
    value: CosemData,
}

impl Data {
    pub fn new(value: CosemData) -> (r: Self)
        ensures
            r.value()@ == value@,
    {
        Self { value }
    }

    pub closed spec fn value(&self) -> CosemData {
        self.value
    }
}

impl CosemObject for Data {
    fn class_id(&self) -> u16 {
        1
    }

    fn version(&self) -> u8 {
        0
    }

    fn attribute_access_rights(&self) -> Vec<AttributeAccessDescriptor> {
        Vec::new()
    }

    fn method_access_rights(&self) -> Vec<MethodAccessDescriptor> {
        Vec::new()
    }

    fn get_attribute(&self, attribute_id: CosemObjectAttributeId) -> Option<CosemData> {
        if attribute_id == 2 {
            Some(copy_data(&self.value))
        } else {
            None
        }
    }

    fn set_attribute(&mut self, attribute_id: CosemObjectAttributeId, data: CosemData) -> Option<()> {
        if attribute_id == 2 {
            self.value = data;
            Some(())
        } else {
            None
        }
    }

    fn invoke_method(&mut self, method_id: CosemObjectMethodId, data: CosemData) -> Option<
        CosemData,
    > {
        None
    }
}

} // verus!
