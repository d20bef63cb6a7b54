use vstd::prelude::*;

use crate::cosem::{CosemObjectAttributeId, CosemObjectMethodId};
use crate::cosem_object::{
    AttributeAccessDescriptor, AttributeAccessMode, CosemObject, MethodAccessDescriptor,
    MethodAccessMode,
};
use crate::types::{copy_data, CosemData, DataModel};

verus! {

/// Scaler 0 and unit 255 (none), the scaler-unit of a fresh register.
pub fn default_scaler_unit() -> (r: CosemData)
    ensures
        r@ == DataModel::Structure(seq![DataModel::Integer(0), DataModel::Enum(255)]),
{
    let mut v: Vec<CosemData> = Vec::new();
    proof {
        assert(crate::types::elems_model(v@) =~= Seq::<DataModel>::empty());
        crate::types::lemma_elems_model_push(v@, CosemData::Integer(0));
    }
    v.push(CosemData::Integer(0));
    proof {
        crate::types::lemma_elems_model_push(v@, CosemData::Enum(255));
    }
    v.push(CosemData::Enum(255));
    assert(crate::types::elems_model(v@) =~= seq![DataModel::Integer(0), DataModel::Enum(255)]);
    CosemData::Structure(v)
}

/// Register (class 3): a value (attribute 2) and its scaler-unit
/// (attribute 3), both readable and writable; method 1 resets the value.
#[derive(Debug)]
pub struct Register {
    value: CosemData,
    scaler_unit: CosemData,
}

impl Register {
    pub fn new() -> (r: Self)
        ensures
            r.value()@ == DataModel::Unsigned(0),
    {
        Self { value: CosemData::Unsigned(0), scaler_unit: default_scaler_unit() }
    }

    pub closed spec fn value(&self) -> CosemData {
        self.value
    }

    /// Sets the value back to `Unsigned(0)`.
    pub fn reset(&mut self) -> (r: Option<CosemData>)
        ensures
            final(self).value()@ == DataModel::Unsigned(0),
            r matches Some(d) && d@ == DataModel::NullData,
    {
        self.value = CosemData::Unsigned(0);
        Some(CosemData::NullData)
    }
}

impl CosemObject for Register {
    fn class_id(&self) -> u16 {
        3
    }

    fn version(&self) -> u8 {
        0
    }

    fn attribute_access_rights(&self) -> Vec<AttributeAccessDescriptor> {
        let mut v: Vec<AttributeAccessDescriptor> = Vec::new();
        v.push(AttributeAccessDescriptor::new(2, AttributeAccessMode::ReadWrite));
        v.push(AttributeAccessDescriptor::new(3, AttributeAccessMode::ReadWrite));
        v
    }

    fn method_access_rights(&self) -> Vec<MethodAccessDescriptor> {
        let mut v: Vec<MethodAccessDescriptor> = Vec::new();
        v.push(MethodAccessDescriptor::new(1, MethodAccessMode::Access));
        v
    }

    fn get_attribute(&self, attribute_id: CosemObjectAttributeId) -> Option<CosemData> {
        if attribute_id == 2 {
            Some(copy_data(&self.value))
        } else if attribute_id == 3 {
            Some(copy_data(&self.scaler_unit))
        } else {
            None
        }
    }

    fn set_attribute(&mut self, attribute_id: CosemObjectAttributeId, data: CosemData) -> Option<()> {
        if attribute_id == 2 {
            self.value = data;
            Some(())
        } else if attribute_id == 3 {
            self.scaler_unit = data;
            Some(())
        } else {
            None
        }
    }

    fn invoke_method(&mut self, method_id: CosemObjectMethodId, data: CosemData) -> Option<
        CosemData,
    > {
        if method_id == 1 {
            self.reset()
        } else {
            None
        }
    }
}

} // verus!
