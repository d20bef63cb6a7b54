use vstd::prelude::*;

use crate::attribute_table::{rights_from_modes, AttributeTable};
use crate::cosem::{CosemObjectAttributeId, CosemObjectMethodId};
use crate::cosem_object::{
    AttributeAccessDescriptor, AttributeAccessMode, CosemObject, MethodAccessDescriptor,
    MethodAccessMode,
};
use crate::types::{CosemData, DataModel};

verus! {

/// Extended Register (class 4): value (2), scaler-unit (3), status (4) and
/// capture time (5), all read-only; method 1 resets the value.
#[derive(Debug)]
pub struct ExtendedRegister {
    attributes: AttributeTable,
}

impl ExtendedRegister {
    /// The value of attribute `id`.
    pub closed spec fn attribute(&self, id: i8) -> Option<DataModel> {
        self.attributes.value_of(id)
    }

    pub closed spec fn attribute_count(&self) -> nat {
        self.attributes.size()
    }

    pub fn new() -> (r: Self)
        ensures
            r.attribute_count() == 4,
    {
        let mut attributes = AttributeTable::nulls(4);
        attributes.set(2, CosemData::Unsigned(0));
        attributes.set(3, crate::register::default_scaler_unit());
        ExtendedRegister { attributes }
    }

    /// Sets the value back to `Unsigned(0)`.
    pub fn reset(&mut self) -> (r: Option<CosemData>)
        ensures
            old(self).attribute_count() >= 1 ==> final(self).attribute(2) == Some(DataModel::Unsigned(0)),
            final(self).attribute_count() == old(self).attribute_count(),
            r matches Some(d) && d@ == DataModel::NullData,
    {
        self.attributes.set(2, CosemData::Unsigned(0));
        Some(CosemData::NullData)
    }
}

impl Default for ExtendedRegister {
    fn default() -> Self {
        Self::new()
    }
}

impl CosemObject for ExtendedRegister {
    fn class_id(&self) -> u16 {
        4
    }

    fn version(&self) -> u8 {
        0
    }

    fn attribute_access_rights(&self) -> Vec<AttributeAccessDescriptor> {
        let modes = [AttributeAccessMode::Read, AttributeAccessMode::Read, AttributeAccessMode::Read, AttributeAccessMode::Read];
        rights_from_modes(modes.as_slice())
    }

    fn method_access_rights(&self) -> Vec<MethodAccessDescriptor> {
        let mut v: Vec<MethodAccessDescriptor> = Vec::new();
        v.push(MethodAccessDescriptor::new(1, MethodAccessMode::Access));
        v
    }

    fn get_attribute(&self, attribute_id: CosemObjectAttributeId) -> Option<CosemData> {
        self.attributes.get(attribute_id)
    }

    fn set_attribute(&mut self, attribute_id: CosemObjectAttributeId, data: CosemData) -> Option<()> {
        self.attributes.set(attribute_id, data)
    }

    fn invoke_method(&mut self, method_id: CosemObjectMethodId, data: CosemData) -> Option<
        CosemData,
    > {
        if method_id == 1 {
            self.reset()
        } else {
            None
        }
    }
}

} // verus!
