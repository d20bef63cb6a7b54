use vstd::prelude::*;

use crate::attribute_table::{rights_from_modes, AttributeTable};
use crate::cosem::{CosemObjectAttributeId, CosemObjectMethodId};
use crate::cosem_object::{AttributeAccessDescriptor, AttributeAccessMode, CosemObject, MethodAccessDescriptor};
use crate::types::{CosemData, DataModel};

verus! {

/// Clock (class 8): time, time zone, status, daylight savings begin, end and
/// deviation, and enabled (attributes 2 to 8); the status is read-only.
#[derive(Debug)]
pub struct Clock {
    attributes: AttributeTable,
}

impl Clock {
    /// The value of attribute `id`.
    pub closed spec fn attribute(&self, id: i8) -> Option<DataModel> {
        self.attributes.value_of(id)
    }

    pub closed spec fn attribute_count(&self) -> nat {
        self.attributes.size()
    }

    pub fn new() -> (r: Self)
        ensures
            r.attribute_count() == 7,
    {
        let mut attributes = AttributeTable::nulls(7);
        Clock { attributes }
    }
}

impl Default for Clock {
    fn default() -> Self {
        Self::new()
    }
}

impl CosemObject for Clock {
    fn class_id(&self) -> u16 {
        8
    }

    fn version(&self) -> u8 {
        0
    }

    fn attribute_access_rights(&self) -> Vec<AttributeAccessDescriptor> {
        let modes = [AttributeAccessMode::ReadWrite, AttributeAccessMode::ReadWrite, AttributeAccessMode::Read, AttributeAccessMode::ReadWrite, AttributeAccessMode::ReadWrite, AttributeAccessMode::ReadWrite, AttributeAccessMode::ReadWrite];
        rights_from_modes(modes.as_slice())
    }

    fn method_access_rights(&self) -> Vec<MethodAccessDescriptor> {
        Vec::new()
    }

    fn get_attribute(&self, attribute_id: CosemObjectAttributeId) -> Option<CosemData> {
        self.attributes.get(attribute_id)
    }

    fn set_attribute(&mut self, attribute_id: CosemObjectAttributeId, data: CosemData) -> Option<()> {
        self.attributes.set(attribute_id, data)
    }

    fn invoke_method(&mut self, method_id: CosemObjectMethodId, data: CosemData) -> Option<
        CosemData,
    > {
        None
    }
}

} // verus!
