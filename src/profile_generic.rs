use vstd::prelude::*;

use crate::attribute_table::AttributeTable;
use crate::cosem::{CosemObjectAttributeId, CosemObjectMethodId};
use crate::cosem_object::{AttributeAccessDescriptor, CosemObject, MethodAccessDescriptor};
use crate::types::{CosemData, DataModel};

verus! {

/// Profile Generic (class 7): buffer, capture objects, capture period, sort
/// method, sort object, entries in use and profile entries (attributes 2
/// to 8). It grants no access rights and has no methods.
#[derive(Debug)]
pub struct ProfileGeneric {
    attributes: AttributeTable,
}

impl ProfileGeneric {
    /// The value of attribute `id`.
    pub closed spec fn attribute(&self, id: i8) -> Option<DataModel> {
        self.attributes.value_of(id)
    }

    pub closed spec fn attribute_count(&self) -> nat {
        self.attributes.size()
    }

    pub fn new() -> (r: Self)
        ensures
            r.attribute_count() == 7,
    {
        let mut attributes = AttributeTable::nulls(7);
        ProfileGeneric { attributes }
    }
}

impl Default for ProfileGeneric {
    fn default() -> Self {
        Self::new()
    }
}

impl CosemObject for ProfileGeneric {
    fn class_id(&self) -> u16 {
        7
    }

    fn version(&self) -> u8 {
        0
    }

    fn attribute_access_rights(&self) -> Vec<AttributeAccessDescriptor> {
        Vec::new()
    }

    fn method_access_rights(&self) -> Vec<MethodAccessDescriptor> {
        Vec::new()
    }

    fn get_attribute(&self, attribute_id: CosemObjectAttributeId) -> Option<CosemData> {
        self.attributes.get(attribute_id)
    }

    fn set_attribute(&mut self, attribute_id: CosemObjectAttributeId, data: CosemData) -> Option<()> {
        self.attributes.set(attribute_id, data)
    }

    fn invoke_method(&mut self, method_id: CosemObjectMethodId, data: CosemData) -> Option<
        CosemData,
    > {
        None
    }
}

} // verus!
